//! Hand-curated prices for catalog printings the feed does not price.
//!
//! The curated list is the source of truth: reconciling writes each of its
//! rows whose printing this catalog holds, replacing whatever the table
//! held for that printing — so a locally edited price converges back to the
//! list, and reconciling twice is reconciling once. A row whose printing
//! the catalog lacks is skipped. Prices are carried as the bit patterns of
//! their `f64`s.

use vstd::prelude::*;
use crate::text::str_eq;

verus! {

/// One curated catalog price.
#[derive(Debug, Clone, PartialEq, Eq)]
pub struct CatalogPriceOverride {
    pub printing_id: String,
    pub price_bits: u64,
    pub observed_at: String,
    pub note: Option<String>,
}

/// The override the table holds for printing `k`: its first row for it.
pub open spec fn override_for(t: Seq<CatalogPriceOverride>, k: Seq<char>) -> Option<CatalogPriceOverride>
    decreases t.len(),
{
    if t.len() == 0 {
        None
    } else if t[0].printing_id@ == k {
        Some(t[0])
    } else {
        override_for(t.drop_first(), k)
    }
}

/// The override for printing `k` after reconciling `seed` — whose rows'
/// printings the catalog holds where `present` says so — into a table
/// whose override for `k` was `before`: the last such seed row for `k`,
/// else what the table held.
pub open spec fn reconciled(
    before: Option<CatalogPriceOverride>,
    seed: Seq<CatalogPriceOverride>,
    present: Seq<bool>,
    k: Seq<char>,
) -> Option<CatalogPriceOverride>
    decreases seed.len(),
{
    if seed.len() == 0 || present.len() != seed.len() {
        before
    } else if present.last() && seed.last().printing_id@ == k {
        Some(seed.last())
    } else {
        reconciled(before, seed.drop_last(), present.drop_last(), k)
    }
}

/// How many seed rows the catalog holds a printing for.
pub open spec fn written(present: Seq<bool>) -> nat
    decreases present.len(),
{
    if present.len() == 0 {
        0
    } else {
        written(present.drop_last()) + if present.last() { 1nat } else { 0nat }
    }
}

/// Some seed row for `k` is written.
pub open spec fn seeds_key(seed: Seq<CatalogPriceOverride>, present: Seq<bool>, k: Seq<char>) -> bool {
    exists|i: int| 0 <= i < seed.len() && present[i] && (#[trigger] seed[i]).printing_id@ == k
}

fn copy_override(o: &CatalogPriceOverride) -> (c: CatalogPriceOverride)
    ensures
        c == *o,
{
    CatalogPriceOverride {
        printing_id: o.printing_id.clone(),
        price_bits: o.price_bits,
        observed_at: o.observed_at.clone(),
        note: crate::text::clone_opt(&o.note),
    }
}

proof fn lemma_override_skip(t: Seq<CatalogPriceOverride>, i: int, k: Seq<char>)
    requires
        0 <= i <= t.len(),
        forall|j: int| 0 <= j < i ==> (#[trigger] t[j]).printing_id@ != k,
    ensures
        override_for(t, k) == override_for(t.skip(i), k),
    decreases i,
{
    if i > 0 {
        assert(t[0].printing_id@ != k);
        assert(t.drop_first().skip(i - 1) =~= t.skip(i));
        assert forall|j: int| 0 <= j < i - 1 implies (#[trigger] t.drop_first()[j]).printing_id@ != k by {
            assert(t.drop_first()[j] == t[j + 1]);
        }
        lemma_override_skip(t.drop_first(), i - 1, k);
    } else {
        assert(t.skip(0) =~= t);
    }
}

/// Write one override: replace the table's row for its printing, or add it.
fn upsert(table: &mut Vec<CatalogPriceOverride>, row: &CatalogPriceOverride)
    ensures
        forall|k: Seq<char>| #[trigger] override_for(final(table)@, k) == if k == row.printing_id@ {
            Some(*row)
        } else {
            override_for(old(table)@, k)
        },
{
    let ghost t0 = table@;
    let mut i: usize = 0;
    while i < table.len()
        invariant
            *table == *old(table),
            table@ == t0,
            i <= table@.len(),
            forall|j: int| 0 <= j < i ==> (#[trigger] table@[j]).printing_id@ != row.printing_id@,
        decreases table.len() - i,
    {
        if str_eq(table[i].printing_id.as_str(), row.printing_id.as_str()) {
            table.set(i, copy_override(row));
            proof {
                let t1 = table@;
                assert forall|k: Seq<char>| #[trigger] override_for(t1, k) == if k == row.printing_id@ {
                    Some(*row)
                } else {
                    override_for(t0, k)
                } by {
                    if k == row.printing_id@ {
                        lemma_override_skip(t1, i as int, k);
                        assert(t1.skip(i as int)[0] == *row);
                    } else {
                        assert forall|j: int| 0 <= j < t0.len() && j != i implies t1[j] == t0[j] by {}
                        lemma_override_agree(t0, t1, i as int, k);
                    }
                }
            }
            return;
        }
        i = i + 1;
    }
    table.push(copy_override(row));
    proof {
        let t1 = table@;
        assert forall|k: Seq<char>| #[trigger] override_for(t1, k) == if k == row.printing_id@ {
            Some(*row)
        } else {
            override_for(t0, k)
        } by {
            lemma_override_push(t0, *row, k);
            if k == row.printing_id@ {
                lemma_override_none(t0, k);
            }
        }
    }
}

/// Two tables differing only at `i`, where neither row is for `k`, hold
/// the same override for `k`.
proof fn lemma_override_agree(a: Seq<CatalogPriceOverride>, b: Seq<CatalogPriceOverride>, i: int, k: Seq<char>)
    requires
        a.len() == b.len(),
        0 <= i < a.len(),
        a[i].printing_id@ != k,
        b[i].printing_id@ != k,
        forall|j: int| 0 <= j < a.len() && j != i ==> a[j] == b[j],
    ensures
        override_for(a, k) == override_for(b, k),
    decreases a.len(),
{
    if a.len() > 0 {
        if i == 0 {
            assert(a.drop_first() =~= b.drop_first());
        } else {
            assert(a[0] == b[0]);
            if a[0].printing_id@ != k {
                assert forall|j: int| 0 <= j < a.len() - 1 && j != i - 1 implies a.drop_first()[j] == b.drop_first()[j] by {
                    assert(a.drop_first()[j] == a[j + 1]);
                    assert(b.drop_first()[j] == b[j + 1]);
                }
                lemma_override_agree(a.drop_first(), b.drop_first(), i - 1, k);
            }
        }
    }
}

/// Adding a row after the table: the table's override wins where it has
/// one, else the new row answers for its own printing.
proof fn lemma_override_push(t: Seq<CatalogPriceOverride>, row: CatalogPriceOverride, k: Seq<char>)
    ensures
        override_for(t.push(row), k) == match override_for(t, k) {
            Some(o) => Some(o),
            None => if row.printing_id@ == k {
                Some(row)
            } else {
                None
            },
        },
    decreases t.len(),
{
    if t.len() == 0 {
        assert(t.push(row).drop_first() =~= Seq::<CatalogPriceOverride>::empty());
    } else {
        assert(t.push(row).drop_first() =~= t.drop_first().push(row));
        lemma_override_push(t.drop_first(), row, k);
    }
}

/// A table with no row for `k` holds no override for it.
proof fn lemma_override_none(t: Seq<CatalogPriceOverride>, k: Seq<char>)
    requires
        forall|j: int| 0 <= j < t.len() ==> (#[trigger] t[j]).printing_id@ != k,
    ensures
        override_for(t, k) is None,
    decreases t.len(),
{
    if t.len() > 0 {
        assert forall|j: int| 0 <= j < t.len() - 1 implies (#[trigger] t.drop_first()[j]).printing_id@ != k by {
            assert(t.drop_first()[j] == t[j + 1]);
        }
        lemma_override_none(t.drop_first(), k);
    }
}

/// Reconcile the curated list `seed` into `table`: `present[i]` says
/// whether the catalog holds seed row `i`'s printing. Each such row
/// replaces the table's override for its printing (a later row for the same
/// printing wins); the rest are skipped. Returns how many rows were
/// written.
pub fn reconcile(table: &mut Vec<CatalogPriceOverride>, seed: &Vec<CatalogPriceOverride>, present: &Vec<bool>) -> (n: usize)
    requires
        present@.len() == seed@.len(),
    ensures
        forall|k: Seq<char>| #[trigger] override_for(final(table)@, k) == reconciled(
            override_for(old(table)@, k),
            seed@,
            present@,
            k,
        ),
        n == written(present@),
{
    let ghost t0 = table@;
    let mut n: usize = 0;
    let mut i: usize = 0;
    while i < seed.len()
        invariant
            present@.len() == seed@.len(),
            i <= seed@.len(),
            n == written(present@.take(i as int)),
            n <= i,
            forall|k: Seq<char>| #[trigger] override_for(table@, k) == reconciled(
                override_for(t0, k),
                seed@.take(i as int),
                present@.take(i as int),
                k,
            ),
        decreases seed.len() - i,
    {
        proof {
            assert(seed@.take(i + 1).drop_last() =~= seed@.take(i as int));
            assert(present@.take(i + 1).drop_last() =~= present@.take(i as int));
        }
        if present[i] {
            upsert(table, &seed[i]);
            n = n + 1;
        }
        i = i + 1;
    }
    assert(seed@.take(seed@.len() as int) =~= seed@);
    assert(present@.take(present@.len() as int) =~= present@);
    n
}

/// Whether the table holds an override for `printing_id`.
pub fn has_override(table: &Vec<CatalogPriceOverride>, printing_id: &str) -> (r: bool)
    ensures
        r == override_for(table@, printing_id@) is Some,
{
    let mut i: usize = 0;
    while i < table.len()
        invariant
            i <= table@.len(),
            forall|j: int| 0 <= j < i ==> (#[trigger] table@[j]).printing_id@ != printing_id@,
        decreases table.len() - i,
    {
        if str_eq(table[i].printing_id.as_str(), printing_id) {
            proof {
                lemma_override_skip(table@, i as int, printing_id@);
            }
            return true;
        }
        i = i + 1;
    }
    proof {
        lemma_override_none(table@, printing_id@);
    }
    false
}

/// Where a written seed row names `k`, reconciling answers with the seed,
/// whatever the table held.
proof fn lemma_seeded_key_ignores_table(
    a: Option<CatalogPriceOverride>,
    b: Option<CatalogPriceOverride>,
    seed: Seq<CatalogPriceOverride>,
    present: Seq<bool>,
    k: Seq<char>,
)
    requires
        present.len() == seed.len(),
        seeds_key(seed, present, k),
    ensures
        reconciled(a, seed, present, k) == reconciled(b, seed, present, k),
    decreases seed.len(),
{
    if seed.len() > 0 && !(present.last() && seed.last().printing_id@ == k) {
        let i = choose|i: int| 0 <= i < seed.len() && present[i] && (#[trigger] seed[i]).printing_id@ == k;
        assert(i < seed.len() - 1);
        assert(seed.drop_last()[i] == seed[i]);
        assert(present.drop_last()[i] == present[i]);
        lemma_seeded_key_ignores_table(a, b, seed.drop_last(), present.drop_last(), k);
    }
}

/// Where no written seed row names `k`, reconciling keeps the table's.
proof fn lemma_unseeded_key_keeps_table(
    a: Option<CatalogPriceOverride>,
    seed: Seq<CatalogPriceOverride>,
    present: Seq<bool>,
    k: Seq<char>,
)
    requires
        present.len() == seed.len(),
        !seeds_key(seed, present, k),
    ensures
        reconciled(a, seed, present, k) == a,
    decreases seed.len(),
{
    if seed.len() > 0 {
        assert(!(present[seed.len() - 1] && seed[seed.len() - 1].printing_id@ == k));
        assert forall|i: int| 0 <= i < seed.len() - 1 && present.drop_last()[i] implies (#[trigger] seed.drop_last()[i]).printing_id@ != k by {
            assert(seed.drop_last()[i] == seed[i]);
            assert(present.drop_last()[i] == present[i]);
        }
        lemma_unseeded_key_keeps_table(a, seed.drop_last(), present.drop_last(), k);
    }
}

/// The curated list is the source of truth. After reconciling, a printing
/// the list writes holds the list's price, whatever the table held before —
/// a local edit is overwritten — and every other printing holds what it
/// held; so reconciling the reconciled table again changes nothing.
pub proof fn lemma_reconcile_converges(
    before: Option<CatalogPriceOverride>,
    edited: Option<CatalogPriceOverride>,
    seed: Seq<CatalogPriceOverride>,
    present: Seq<bool>,
    k: Seq<char>,
)
    requires
        present.len() == seed.len(),
    ensures
        seeds_key(seed, present, k) ==> reconciled(edited, seed, present, k) == reconciled(before, seed, present, k),
        !seeds_key(seed, present, k) ==> reconciled(before, seed, present, k) == before,
        reconciled(reconciled(before, seed, present, k), seed, present, k) == reconciled(before, seed, present, k),
{
    if seeds_key(seed, present, k) {
        lemma_seeded_key_ignores_table(edited, before, seed, present, k);
        lemma_seeded_key_ignores_table(reconciled(before, seed, present, k), before, seed, present, k);
    } else {
        lemma_unseeded_key_keeps_table(before, seed, present, k);
    }
}

} // verus!
