//! Card-condition value multipliers, per tenant.
//!
//! A collection is seeded with the default conditions on every open, and
//! seeding is insert-if-absent, never an overwrite: a row the collection
//! already holds is the collection's own, and a second seeding writes
//! nothing at all. Multipliers are carried as the bit patterns of their
//! `f64`s.

use vstd::prelude::*;
use crate::text::str_eq;

verus! {

/// One row of the `conditions` table.
#[derive(Debug, Clone, PartialEq, Eq)]
pub struct Condition {
    pub name: String,
    pub multiplier_bits: u64,
    pub rank: i64,
}

/// The default conditions, best first: TCGplayer's raw-card multipliers of
/// a copy's Near-Mint market price.
pub open spec fn spec_default_conditions() -> Seq<(Seq<char>, u64, i64)> {
    seq![
        ("Near Mint"@, 0x3ff0000000000000u64, 1i64),
        ("Lightly Played"@, 0x3feb333333333333u64, 2i64),
        ("Moderately Played"@, 0x3fe4cccccccccccdu64, 3i64),
        ("Heavily Played"@, 0x3fdccccccccccccdu64, 4i64),
        ("Damaged"@, 0x3fd0000000000000u64, 5i64),
    ]
}

fn condition(name: &str, multiplier_bits: u64, rank: i64) -> (c: Condition)
    ensures
        c.name@ == name@,
        c.multiplier_bits == multiplier_bits,
        c.rank == rank,
{
    Condition { name: crate::text::owned(name), multiplier_bits, rank }
}

/// The five conditions a collection is seeded with: Near Mint 1.0,
/// Lightly Played 0.85, Moderately Played 0.65, Heavily Played 0.45 and
/// Damaged 0.25, ranked in that order.
pub fn default_conditions() -> (v: Vec<Condition>)
    ensures
        v@.len() == 5,
        forall|i: int| 0 <= i < 5 ==> {
            let (n, m, r) = #[trigger] spec_default_conditions()[i];
            &&& v@[i].name@ == n
            &&& v@[i].multiplier_bits == m
            &&& v@[i].rank == r
        },
{
    let mut v: Vec<Condition> = Vec::new();
    v.push(condition("Near Mint", 0x3ff0000000000000u64, 1));
    v.push(condition("Lightly Played", 0x3feb333333333333u64, 2));
    v.push(condition("Moderately Played", 0x3fe4cccccccccccdu64, 3));
    v.push(condition("Heavily Played", 0x3fdccccccccccccdu64, 4));
    v.push(condition("Damaged", 0x3fd0000000000000u64, 5));
    v
}

/// Some row of `rows` is named `name`.
pub open spec fn has_name(rows: Seq<Condition>, name: Seq<char>) -> bool {
    exists|i: int| 0 <= i < rows.len() && (#[trigger] rows[i]).name@ == name
}

/// The rows that seeding `seed` into a table holding `existing` inserts, in
/// seed order: each seed row whose name is neither in the table nor among
/// the rows inserted before it.
pub open spec fn seeded(existing: Seq<Condition>, seed: Seq<Condition>) -> Seq<Condition>
    decreases seed.len(),
{
    if seed.len() == 0 {
        Seq::empty()
    } else {
        let prev = seeded(existing, seed.drop_last());
        let c = seed.last();
        if has_name(existing, c.name@) || has_name(prev, c.name@) {
            prev
        } else {
            prev.push(c)
        }
    }
}

fn name_in(rows: &Vec<Condition>, name: &str) -> (r: bool)
    ensures
        r == has_name(rows@, name@),
{
    let mut i: usize = 0;
    while i < rows.len()
        invariant
            i <= rows@.len(),
            forall|k: int| 0 <= k < i ==> (#[trigger] rows@[k]).name@ != name@,
        decreases rows.len() - i,
    {
        if str_eq(rows[i].name.as_str(), name) {
            return true;
        }
        i = i + 1;
    }
    false
}

fn copy_condition(c: &Condition) -> (r: Condition)
    ensures
        r == *c,
{
    Condition { name: c.name.clone(), multiplier_bits: c.multiplier_bits, rank: c.rank }
}

/// Seed a collection's conditions: the rows to insert into a table holding
/// `existing`, filling in only the names it does not already have. Their
/// number is what seeding reports — zero on every open after the first.
pub fn seed_defaults(existing: &Vec<Condition>, seed: &Vec<Condition>) -> (inserted: Vec<Condition>)
    ensures
        inserted@ == seeded(existing@, seed@),
{
    let mut inserted: Vec<Condition> = Vec::new();
    let mut i: usize = 0;
    while i < seed.len()
        invariant
            i <= seed@.len(),
            inserted@ == seeded(existing@, seed@.take(i as int)),
        decreases seed.len() - i,
    {
        proof {
            assert(seed@.take(i + 1).drop_last() =~= seed@.take(i as int));
        }
        let c = &seed[i];
        if !name_in(existing, c.name.as_str()) && !name_in(&inserted, c.name.as_str()) {
            inserted.push(copy_condition(c));
        }
        i = i + 1;
    }
    assert(seed@.take(seed@.len() as int) =~= seed@);
    inserted
}

/// Every row seeding inserts is named after a seed row and is new to the
/// table; and after seeding, every seed name is in the table.
proof fn lemma_seeded_covers(existing: Seq<Condition>, seed: Seq<Condition>)
    ensures
        forall|k: int| 0 <= k < seed.len() ==> has_name(existing, (#[trigger] seed[k]).name@) || has_name(
            seeded(existing, seed),
            seed[k].name@,
        ),
        forall|j: int| 0 <= j < seeded(existing, seed).len() ==> !has_name(existing, (#[trigger] seeded(existing, seed)[j]).name@),
    decreases seed.len(),
{
    if seed.len() > 0 {
        let init = seed.drop_last();
        lemma_seeded_covers(existing, init);
        let prev = seeded(existing, init);
        let c = seed.last();
        let now = seeded(existing, seed);
        assert forall|k: int| 0 <= k < seed.len() implies has_name(existing, (#[trigger] seed[k]).name@) || has_name(
            now,
            seed[k].name@,
        ) by {
            if k < seed.len() - 1 {
                assert(seed[k] == init[k]);
                if !has_name(existing, seed[k].name@) {
                    let w = choose|w: int| 0 <= w < prev.len() && (#[trigger] prev[w]).name@ == seed[k].name@;
                    assert(now[w] == prev[w]);
                }
            } else if !has_name(existing, c.name@) && !has_name(prev, c.name@) {
                assert(now[prev.len() as int] == c);
            }
        }
        assert forall|j: int| 0 <= j < now.len() implies !has_name(existing, (#[trigger] now[j]).name@) by {
            if j < prev.len() {
                assert(now[j] == prev[j]);
            }
        }
    }
}

/// Rows all of whose names a table already holds seed nothing.
proof fn lemma_seeding_what_is_there(existing: Seq<Condition>, seed: Seq<Condition>)
    requires
        forall|k: int| 0 <= k < seed.len() ==> has_name(existing, (#[trigger] seed[k]).name@),
    ensures
        seeded(existing, seed) == Seq::<Condition>::empty(),
    decreases seed.len(),
{
    if seed.len() > 0 {
        let init = seed.drop_last();
        assert forall|k: int| 0 <= k < init.len() implies has_name(existing, (#[trigger] init[k]).name@) by {
            assert(init[k] == seed[k]);
        }
        lemma_seeding_what_is_there(existing, init);
        assert(has_name(existing, seed[seed.len() - 1].name@));
    }
}

/// Seeding is insert-if-absent: what it inserts is new to the table, so no
/// row the collection already held is overwritten; and seeding the table it
/// left — the old rows followed by the inserted ones — inserts nothing.
pub proof fn lemma_seeding_twice_inserts_nothing(existing: Seq<Condition>, seed: Seq<Condition>)
    ensures
        forall|j: int| 0 <= j < seeded(existing, seed).len() ==> !has_name(existing, (#[trigger] seeded(existing, seed)[j]).name@),
        seeded(existing + seeded(existing, seed), seed) == Seq::<Condition>::empty(),
{
    lemma_seeded_covers(existing, seed);
    let ins = seeded(existing, seed);
    let table = existing + ins;
    assert forall|k: int| 0 <= k < seed.len() implies has_name(table, (#[trigger] seed[k]).name@) by {
        if has_name(existing, seed[k].name@) {
            let w = choose|w: int| 0 <= w < existing.len() && (#[trigger] existing[w]).name@ == seed[k].name@;
            assert(table[w] == existing[w]);
        } else {
            let w = choose|w: int| 0 <= w < ins.len() && (#[trigger] ins[w]).name@ == seed[k].name@;
            assert(table[existing.len() + w] == ins[w]);
        }
    }
    lemma_seeding_what_is_there(table, seed);
}


/// The default conditions run best first: each ranks after the one before
/// it and is worth a smaller share of the market price (a positive `f64`'s
/// bits order as its value), starting from Near Mint at the full price
/// (1.0) and ending at Damaged.
pub proof fn lemma_default_conditions_run_best_first(i: int, j: int)
    requires
        0 <= i < j < 5,
    ensures
        spec_default_conditions()[i].2 < spec_default_conditions()[j].2,
        spec_default_conditions()[j].1 < spec_default_conditions()[i].1,
        spec_default_conditions()[0].0 == "Near Mint"@,
        spec_default_conditions()[0].1 == 0x3ff0000000000000u64,
        spec_default_conditions()[4].0 == "Damaged"@,
{
}

} // verus!
