//! Purchase orders. Committing an order writes the order, a batch named
//! after it, and one `ordered` copy per unit of each line; here is decided
//! whether the order may be committed and what it writes.

use vstd::prelude::*;
use crate::error::DbError;
use crate::text::{owned, cat, str_eq};
use crate::seqs::{lemma_filter_push, lemma_take_push};

verus! {

/// One line of an order — a printing, a quantity, and the per-card price
/// (carried as the bit pattern of its `f64`).
#[derive(Debug, Clone, PartialEq, Eq)]
pub struct OrderLine {
    pub printing_id: String,
    pub quantity: i64,
    pub purchase_price_bits: Option<u64>,
}

/// The copies one line writes: its printing, how many (`quantity`, never
/// fewer than one), and the price each carries.
#[derive(Debug, Clone, PartialEq, Eq)]
pub struct PlannedLine {
    pub printing_id: String,
    pub copies: i64,
    pub purchase_price_bits: Option<u64>,
}

/// What committing an order writes besides the order row: a batch of type
/// `order_<source>`, and the copies of each line, in line order, each
/// `ordered`, `Near Mint`, `English`, from `order_import`.
#[derive(Debug, Clone, PartialEq, Eq)]
pub struct OrderPlan {
    pub batch_type: String,
    pub lines: Vec<PlannedLine>,
}

/// The number of copies a line writes.
pub open spec fn copies_of(q: i64) -> i64 {
    if q < 1 {
        1
    } else {
        q
    }
}

/// Plan the commit of an order whose lines are `lines`; `in_catalog[i]`
/// says whether line `i`'s printing exists in the catalog. The first line
/// whose printing does not is a not-found error and nothing is written.
pub fn create(source: &str, lines: &Vec<OrderLine>, in_catalog: &Vec<bool>) -> (r: Result<OrderPlan, DbError>)
    requires
        in_catalog@.len() == lines@.len(),
    ensures
        r is Err <==> exists|i: int| 0 <= i < lines@.len() && !#[trigger] in_catalog@[i],
        r matches Err(e) ==> e is NotFound && exists|i: int|
            0 <= i < lines@.len() && !#[trigger] in_catalog@[i] && (forall|j: int| 0 <= j < i ==> in_catalog@[j])
                && e->NotFound_0@ == "printing '"@ + lines@[i].printing_id@ + "' is not in the catalog"@,
        r matches Ok(p) ==> {
            &&& p.batch_type@ == "order_"@ + source@
            &&& p.lines@.len() == lines@.len()
            &&& forall|i: int|
                0 <= i < lines@.len() ==> {
                    let l = #[trigger] p.lines@[i];
                    &&& l.printing_id == lines@[i].printing_id
                    &&& l.copies == copies_of(lines@[i].quantity)
                    &&& l.purchase_price_bits == lines@[i].purchase_price_bits
                }
        },
{
    let mut i: usize = 0;
    while i < lines.len()
        invariant
            in_catalog@.len() == lines@.len(),
            i <= lines@.len(),
            forall|k: int| 0 <= k < i ==> #[trigger] in_catalog@[k],
        decreases lines.len() - i,
    {
        if !in_catalog[i] {
            return Err(DbError::NotFound(cat3_missing(lines[i].printing_id.as_str())));
        }
        i = i + 1;
    }
    let mut planned: Vec<PlannedLine> = Vec::new();
    let mut j: usize = 0;
    while j < lines.len()
        invariant
            j <= lines@.len(),
            planned@.len() == j,
            forall|k: int|
                0 <= k < j ==> {
                    let l = #[trigger] planned@[k];
                    &&& l.printing_id == lines@[k].printing_id
                    &&& l.copies == copies_of(lines@[k].quantity)
                    &&& l.purchase_price_bits == lines@[k].purchase_price_bits
                },
        decreases lines.len() - j,
    {
        let q = lines[j].quantity;
        planned.push(
            PlannedLine {
                printing_id: lines[j].printing_id.clone(),
                copies: if q < 1 {
                    1
                } else {
                    q
                },
                purchase_price_bits: lines[j].purchase_price_bits,
            },
        );
        j = j + 1;
    }
    Ok(OrderPlan { batch_type: cat("order_", source), lines: planned })
}

/// A copy as receiving sees it: its id, the order it came from, and its
/// status.
#[derive(Debug, Clone, PartialEq, Eq)]
pub struct OrderedCopy {
    pub id: i64,
    pub order_id: Option<i64>,
    pub status: String,
}

/// A copy of order `order_id` that has not arrived yet.
pub open spec fn awaiting(order_id: i64) -> spec_fn(OrderedCopy) -> bool {
    |c: OrderedCopy| c.order_id == Some(order_id) && c.status@ == "ordered"@
}

/// The copies that receiving order `order_id` flips to `owned`, by id, in
/// the order given: those of that order still `ordered`. Their number is
/// what receiving reports.
pub fn receive(copies: &Vec<OrderedCopy>, order_id: i64) -> (ids: Vec<i64>)
    ensures
        ids@ == copies@.filter(awaiting(order_id)).map_values(|c: OrderedCopy| c.id),
{
    let mut ids: Vec<i64> = Vec::new();
    let mut i: usize = 0;
    while i < copies.len()
        invariant
            i <= copies@.len(),
            ids@ == copies@.take(i as int).filter(awaiting(order_id)).map_values(|c: OrderedCopy| c.id),
        decreases copies.len() - i,
    {
        proof {
            lemma_take_push(copies@, i as int);
            lemma_filter_push(copies@.take(i as int), copies@[i as int], awaiting(order_id));
        }
        let ghost before = copies@.take(i as int).filter(awaiting(order_id));
        let c = &copies[i];
        if c.order_id == Some(order_id) && str_eq(c.status.as_str(), "ordered") {
            ids.push(c.id);
            assert(before.push(*c).map_values(|c: OrderedCopy| c.id) =~= before.map_values(
                |c: OrderedCopy| c.id,
            ).push(c.id));
        }
        i = i + 1;
    }
    assert(copies@.take(copies@.len() as int) =~= copies@);
    ids
}

fn cat3_missing(printing_id: &str) -> (r: String)
    ensures
        r@ == "printing '"@ + printing_id@ + "' is not in the catalog"@,
{
    crate::text::cat3("printing '", printing_id, "' is not in the catalog")
}

} // verus!
