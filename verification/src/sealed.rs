//! Decisions behind writes to the sealed collection — booster boxes, ETBs,
//! bundles and tins. A product is added only when the catalog holds it,
//! one of it and `owned` unless told otherwise, stamped from the clock; an
//! edit replaces what it names and keeps everything else. Prices are
//! carried as the bit patterns of their `f64`s.

use vstd::prelude::*;
use crate::clock::{Clock, now_rfc3339, readable, advanced, spec_rfc3339_of};
use crate::error::DbError;
use crate::shelves::keep_opt;
use crate::text::{cat3, int_to_string, owned, decimal};

verus! {

/// A sealed product from the catalog — what a search for something to add
/// finds.
#[derive(Debug, Clone, PartialEq, Eq)]
pub struct SealedProduct {
    pub product_id: i64,
    pub set_code: Option<String>,
    pub name: String,
    pub category: String,
    pub image_url: Option<String>,
    pub release_date: Option<String>,
}

/// A sealed-collection row, without its catalog columns.
#[derive(Debug, Clone, PartialEq, Eq)]
pub struct SealedEntry {
    pub id: i64,
    pub product_id: i64,
    pub quantity: i64,
    pub condition: Option<String>,
    pub purchase_price_bits: Option<u64>,
    pub sale_price_bits: Option<u64>,
    pub purchase_date: Option<String>,
    pub source: Option<String>,
    pub seller_name: Option<String>,
    pub notes: Option<String>,
    pub status: String,
    pub added_at: String,
}

/// Fields for adding a sealed product to the collection.
#[derive(Debug, Clone, PartialEq, Eq)]
pub struct NewSealed {
    pub product_id: i64,
    pub quantity: Option<i64>,
    pub condition: Option<String>,
    pub purchase_price_bits: Option<u64>,
    pub purchase_date: Option<String>,
    pub source: Option<String>,
    pub seller_name: Option<String>,
    pub notes: Option<String>,
}

/// Editable sealed-entry fields, `status` among them for disposal. A `None`
/// field is left unchanged.
#[derive(Debug, Clone, PartialEq, Eq)]
pub struct SealedEdit {
    pub quantity: Option<i64>,
    pub condition: Option<String>,
    pub purchase_price_bits: Option<u64>,
    pub sale_price_bits: Option<u64>,
    pub purchase_date: Option<String>,
    pub source: Option<String>,
    pub seller_name: Option<String>,
    pub notes: Option<String>,
    pub status: Option<String>,
}

/// `new` when given, `old` otherwise.
pub open spec fn or_keep<T>(new: Option<T>, old: T) -> T {
    match new {
        Some(v) => v,
        None => old,
    }
}

/// `new` when given, `old` otherwise, for a field that may be empty.
pub open spec fn or_keep_opt<T>(new: Option<T>, old: Option<T>) -> Option<T> {
    match new {
        Some(v) => Some(v),
        None => old,
    }
}

/// Add a sealed product under row id `id`: one absent from the catalog
/// (`product_exists` false) is not found, and the clock is left alone.
/// Otherwise the row holds what was given, a quantity of one unless told
/// otherwise, no sale price, status `owned`, and the clock's reading as its
/// `added_at`.
pub fn add(id: i64, new: &NewSealed, product_exists: bool, clock: &mut Clock) -> (r: Result<SealedEntry, DbError>)
    requires
        readable(*old(clock)),
    ensures
        r is Err <==> !product_exists,
        r matches Err(e) ==> e is NotFound && e->NotFound_0@ == "sealed product "@ + decimal(
            new.product_id as int,
        ) + " is not in the catalog"@,
        r is Err ==> *final(clock) == *old(clock),
        r matches Ok(s) ==> {
            &&& s.id == id
            &&& s.product_id == new.product_id
            &&& s.quantity == or_keep(new.quantity, 1)
            &&& s.condition == new.condition
            &&& s.purchase_price_bits == new.purchase_price_bits
            &&& s.sale_price_bits is None
            &&& s.purchase_date == new.purchase_date
            &&& s.source == new.source
            &&& s.seller_name == new.seller_name
            &&& s.notes == new.notes
            &&& s.status@ == "owned"@
            &&& *final(clock) == advanced(*old(clock))
            &&& old(clock).pinned matches Some(p) ==> s.added_at@ == spec_rfc3339_of(p.next)
        },
{
    if !product_exists {
        let n = int_to_string(new.product_id);
        return Err(DbError::NotFound(cat3("sealed product ", n.as_str(), " is not in the catalog")));
    }
    let added_at = now_rfc3339(clock);
    Ok(SealedEntry {
        id,
        product_id: new.product_id,
        quantity: match new.quantity {
            Some(q) => q,
            None => 1,
        },
        condition: keep_opt(&None, &new.condition),
        purchase_price_bits: new.purchase_price_bits,
        sale_price_bits: None,
        purchase_date: keep_opt(&None, &new.purchase_date),
        source: keep_opt(&None, &new.source),
        seller_name: keep_opt(&None, &new.seller_name),
        notes: keep_opt(&None, &new.notes),
        status: owned("owned"),
        added_at,
    })
}

/// A sealed entry with an edit applied.
pub open spec fn edited(entry: SealedEntry, edit: SealedEdit) -> SealedEntry {
    SealedEntry {
        quantity: or_keep(edit.quantity, entry.quantity),
        condition: or_keep_opt(edit.condition, entry.condition),
        purchase_price_bits: or_keep_opt(edit.purchase_price_bits, entry.purchase_price_bits),
        sale_price_bits: or_keep_opt(edit.sale_price_bits, entry.sale_price_bits),
        purchase_date: or_keep_opt(edit.purchase_date, entry.purchase_date),
        source: or_keep_opt(edit.source, entry.source),
        seller_name: or_keep_opt(edit.seller_name, entry.seller_name),
        notes: or_keep_opt(edit.notes, entry.notes),
        status: or_keep(edit.status, entry.status),
        ..entry
    }
}

/// Apply an edit to a sealed entry: each given field replaces the stored
/// one, and every other field, the id, product and `added_at` among them,
/// is kept.
pub fn update(entry: &SealedEntry, edit: &SealedEdit) -> (r: SealedEntry)
    ensures
        r.id == entry.id,
        r.product_id == entry.product_id,
        r.quantity == or_keep(edit.quantity, entry.quantity),
        r.condition == or_keep_opt(edit.condition, entry.condition),
        r.purchase_price_bits == or_keep_opt(edit.purchase_price_bits, entry.purchase_price_bits),
        r.sale_price_bits == or_keep_opt(edit.sale_price_bits, entry.sale_price_bits),
        r.purchase_date == or_keep_opt(edit.purchase_date, entry.purchase_date),
        r.source == or_keep_opt(edit.source, entry.source),
        r.seller_name == or_keep_opt(edit.seller_name, entry.seller_name),
        r.notes == or_keep_opt(edit.notes, entry.notes),
        r.status == or_keep(edit.status, entry.status),
        r.added_at == entry.added_at,
        r == edited(*entry, *edit),
{
    SealedEntry {
        id: entry.id,
        product_id: entry.product_id,
        quantity: match edit.quantity {
            Some(q) => q,
            None => entry.quantity,
        },
        condition: keep_opt(&edit.condition, &entry.condition),
        purchase_price_bits: match edit.purchase_price_bits {
            Some(p) => Some(p),
            None => entry.purchase_price_bits,
        },
        sale_price_bits: match edit.sale_price_bits {
            Some(p) => Some(p),
            None => entry.sale_price_bits,
        },
        purchase_date: keep_opt(&edit.purchase_date, &entry.purchase_date),
        source: keep_opt(&edit.source, &entry.source),
        seller_name: keep_opt(&edit.seller_name, &entry.seller_name),
        notes: keep_opt(&edit.notes, &entry.notes),
        status: crate::shelves::keep_str(&edit.status, &entry.status),
        added_at: entry.added_at.clone(),
    }
}

/// Applying the same edit twice leaves the entry as applying it once.
pub proof fn lemma_sealed_edit_is_idempotent(entry: SealedEntry, edit: SealedEdit)
    ensures
        edited(edited(entry, edit), edit) == edited(entry, edit),
{
}

} // verus!
