//! Decisions behind writes to the `collection` table — one row per
//! physical card. A copy is added only for a printing the catalog holds,
//! never into a binder and a deck at once, with the schema's defaults for
//! what the caller left out and a timestamp from the clock. Every status
//! change and every move is recorded with where it came from.

use vstd::prelude::*;
use crate::clock::{Clock, now_rfc3339, readable, advanced, spec_rfc3339_of};
use crate::error::DbError;
use crate::text::{owned, cat, cat3, str_eq, int_to_string, decimal};
use crate::sealed::{or_keep, or_keep_opt};
use crate::shelves::{keep_opt, keep_str};

verus! {

/// Fields supplied when adding a copy. The purchase price is carried as the
/// bit pattern of its `f64`.
#[derive(Debug, Clone, PartialEq, Eq)]
pub struct NewCopy {
    pub printing_id: String,
    pub condition: Option<String>,
    pub language: Option<String>,
    pub purchase_price_bits: Option<u64>,
    pub acquired_at: Option<String>,
    pub source: String,
    pub status: Option<String>,
    pub notes: Option<String>,
    pub order_id: Option<i64>,
    pub binder_id: Option<i64>,
    pub deck_id: Option<i64>,
    pub batch_id: Option<i64>,
}

/// The row an add inserts, and when its opening status entry is logged.
#[derive(Debug, Clone, PartialEq, Eq)]
pub struct PlannedCopy {
    pub printing_id: String,
    pub condition: String,
    pub language: String,
    pub purchase_price_bits: Option<u64>,
    pub acquired_at: String,
    pub source: String,
    pub status: String,
    pub notes: Option<String>,
    pub order_id: Option<i64>,
    pub binder_id: Option<i64>,
    pub deck_id: Option<i64>,
    pub batch_id: Option<i64>,
    pub logged_at: String,
}

fn or_default(o: &Option<String>, d: &str) -> (r: String)
    ensures
        r@ == match o { Some(s) => s@, None => d@ },
{
    match o {
        Some(s) => s.clone(),
        None => owned(d),
    }
}

fn copy_opt(o: &Option<String>) -> (r: Option<String>)
    ensures
        r == *o,
{
    match o {
        Some(s) => Some(s.clone()),
        None => None,
    }
}

/// Add a copy: a printing missing from the catalog (`printing_exists`
/// false) is not found; a binder and a deck at once is a conflict.
/// Otherwise the copy is `Near Mint`, `English` and `owned` unless told
/// otherwise, acquired now unless a date is given, and its opening status
/// entry is logged now — the clock is read for the acquisition stamp (only
/// when none is given) and then for the log.
pub fn add(new: &NewCopy, printing_exists: bool, clock: &mut Clock) -> (r: Result<PlannedCopy, DbError>)
    requires
        readable(*old(clock)),
        readable(advanced(*old(clock))),
    ensures
        !printing_exists ==> (r matches Err(e) && e is NotFound),
        printing_exists && new.binder_id is Some && new.deck_id is Some ==> (r matches Err(e) && e is Conflict),
        r is Ok <==> printing_exists && !(new.binder_id is Some && new.deck_id is Some),
        r is Err ==> *final(clock) == *old(clock),
        r matches Ok(c) ==> {
            &&& c.printing_id == new.printing_id
            &&& c.condition@ == match new.condition { Some(s) => s@, None => "Near Mint"@ }
            &&& c.language@ == match new.language { Some(s) => s@, None => "English"@ }
            &&& c.status@ == match new.status { Some(s) => s@, None => "owned"@ }
            &&& c.purchase_price_bits == new.purchase_price_bits
            &&& c.source == new.source
            &&& c.notes == new.notes
            &&& c.order_id == new.order_id
            &&& c.binder_id == new.binder_id
            &&& c.deck_id == new.deck_id
            &&& c.batch_id == new.batch_id
            &&& new.acquired_at matches Some(a) ==> c.acquired_at == a
            &&& *final(clock) == if new.acquired_at is Some {
                advanced(*old(clock))
            } else {
                advanced(advanced(*old(clock)))
            }
            &&& (new.acquired_at is None && old(clock).pinned is Some) ==> c.acquired_at@
                == spec_rfc3339_of(old(clock).pinned.unwrap().next)
        },
{
    if !printing_exists {
        return Err(DbError::NotFound(cat3("printing '", new.printing_id.as_str(), "' is not in the catalog")));
    }
    if new.binder_id.is_some() && new.deck_id.is_some() {
        return Err(DbError::Conflict(owned("a copy cannot be added to a binder and a deck at once")));
    }
    let acquired_at = match &new.acquired_at {
        Some(a) => a.clone(),
        None => now_rfc3339(clock),
    };
    let logged_at = now_rfc3339(clock);
    Ok(PlannedCopy {
        printing_id: new.printing_id.clone(),
        condition: or_default(&new.condition, "Near Mint"),
        language: or_default(&new.language, "English"),
        purchase_price_bits: new.purchase_price_bits,
        acquired_at,
        source: new.source.clone(),
        status: or_default(&new.status, "owned"),
        notes: copy_opt(&new.notes),
        order_id: new.order_id,
        binder_id: new.binder_id,
        deck_id: new.deck_id,
        batch_id: new.batch_id,
        logged_at,
    })
}

/// A row of the `collection` table. Prices and the grade are carried as the
/// bit patterns of their `f64`s.
#[derive(Debug, Clone, PartialEq, Eq)]
pub struct CollectionEntry {
    pub id: i64,
    pub printing_id: String,
    pub condition: String,
    pub language: String,
    pub purchase_price_bits: Option<u64>,
    pub sale_price_bits: Option<u64>,
    pub acquired_at: String,
    pub source: String,
    pub notes: Option<String>,
    pub tags: Option<String>,
    pub graded: bool,
    pub grade_company: Option<String>,
    pub grade_value_bits: Option<u64>,
    pub grade_cert: Option<String>,
    pub status: String,
    pub order_id: Option<i64>,
    pub binder_id: Option<i64>,
    pub deck_id: Option<i64>,
    pub batch_id: Option<i64>,
}

/// Editable per-copy fields. A `None` field is left unchanged.
#[derive(Debug, Clone, PartialEq, Eq)]
pub struct CopyEdit {
    pub condition: Option<String>,
    pub language: Option<String>,
    pub purchase_price_bits: Option<u64>,
    pub sale_price_bits: Option<u64>,
    pub notes: Option<String>,
    pub tags: Option<String>,
    pub graded: Option<bool>,
    pub grade_company: Option<String>,
    pub grade_value_bits: Option<u64>,
    pub grade_cert: Option<String>,
}

/// A copy with an edit applied: each given field replaces the stored one.
pub open spec fn edited_copy(e: CollectionEntry, edit: CopyEdit) -> CollectionEntry {
    CollectionEntry {
        condition: or_keep(edit.condition, e.condition),
        language: or_keep(edit.language, e.language),
        purchase_price_bits: or_keep_opt(edit.purchase_price_bits, e.purchase_price_bits),
        sale_price_bits: or_keep_opt(edit.sale_price_bits, e.sale_price_bits),
        notes: or_keep_opt(edit.notes, e.notes),
        tags: or_keep_opt(edit.tags, e.tags),
        graded: or_keep(edit.graded, e.graded),
        grade_company: or_keep_opt(edit.grade_company, e.grade_company),
        grade_value_bits: or_keep_opt(edit.grade_value_bits, e.grade_value_bits),
        grade_cert: or_keep_opt(edit.grade_cert, e.grade_cert),
        ..e
    }
}

/// Apply an edit to a copy: the editable fields it names are replaced,
/// everything else — printing, status, where the copy lives — is kept.
pub fn update(entry: &CollectionEntry, edit: &CopyEdit) -> (r: CollectionEntry)
    ensures
        r == edited_copy(*entry, *edit),
        edit.condition matches Some(v) ==> r.condition == v,
        edit.condition is None ==> r.condition == entry.condition,
        edit.language matches Some(v) ==> r.language == v,
        edit.language is None ==> r.language == entry.language,
        edit.purchase_price_bits matches Some(v) ==> r.purchase_price_bits == Some(v),
        edit.purchase_price_bits is None ==> r.purchase_price_bits == entry.purchase_price_bits,
        edit.sale_price_bits matches Some(v) ==> r.sale_price_bits == Some(v),
        edit.sale_price_bits is None ==> r.sale_price_bits == entry.sale_price_bits,
        edit.notes matches Some(v) ==> r.notes == Some(v),
        edit.notes is None ==> r.notes == entry.notes,
        edit.tags matches Some(v) ==> r.tags == Some(v),
        edit.tags is None ==> r.tags == entry.tags,
        edit.graded matches Some(v) ==> r.graded == v,
        edit.graded is None ==> r.graded == entry.graded,
        edit.grade_company matches Some(v) ==> r.grade_company == Some(v),
        edit.grade_company is None ==> r.grade_company == entry.grade_company,
        edit.grade_value_bits matches Some(v) ==> r.grade_value_bits == Some(v),
        edit.grade_value_bits is None ==> r.grade_value_bits == entry.grade_value_bits,
        edit.grade_cert matches Some(v) ==> r.grade_cert == Some(v),
        edit.grade_cert is None ==> r.grade_cert == entry.grade_cert,
        r.id == entry.id,
        r.printing_id == entry.printing_id,
        r.acquired_at == entry.acquired_at,
        r.source == entry.source,
        r.status == entry.status,
        r.order_id == entry.order_id,
        r.binder_id == entry.binder_id,
        r.deck_id == entry.deck_id,
        r.batch_id == entry.batch_id,
{
    CollectionEntry {
        id: entry.id,
        printing_id: entry.printing_id.clone(),
        condition: keep_str(&edit.condition, &entry.condition),
        language: keep_str(&edit.language, &entry.language),
        purchase_price_bits: match edit.purchase_price_bits {
            Some(p) => Some(p),
            None => entry.purchase_price_bits,
        },
        sale_price_bits: match edit.sale_price_bits {
            Some(p) => Some(p),
            None => entry.sale_price_bits,
        },
        acquired_at: entry.acquired_at.clone(),
        source: entry.source.clone(),
        notes: keep_opt(&edit.notes, &entry.notes),
        tags: keep_opt(&edit.tags, &entry.tags),
        graded: match edit.graded {
            Some(g) => g,
            None => entry.graded,
        },
        grade_company: keep_opt(&edit.grade_company, &entry.grade_company),
        grade_value_bits: match edit.grade_value_bits {
            Some(p) => Some(p),
            None => entry.grade_value_bits,
        },
        grade_cert: keep_opt(&edit.grade_cert, &entry.grade_cert),
        status: entry.status.clone(),
        order_id: entry.order_id,
        binder_id: entry.binder_id,
        deck_id: entry.deck_id,
        batch_id: entry.batch_id,
    }
}

/// A status change to record: from what, to what.
#[derive(Debug, Clone, PartialEq, Eq)]
pub struct StatusChange {
    pub from: String,
    pub to: String,
}

/// The not-found message for collection entry `id`.
pub open spec fn missing_entry(id: i64) -> Seq<char> {
    "collection entry "@ + decimal(id as int)
}

fn missing_entry_exec(id: i64) -> (e: DbError)
    ensures
        e is NotFound && e->NotFound_0@ == missing_entry(id),
{
    let n = int_to_string(id);
    DbError::NotFound(cat("collection entry ", n.as_str()))
}

/// Change the lifecycle status of copy `id`. `current` is the copy's
/// status, or `None` when there is no such copy — not found.
pub fn set_status(id: i64, current: &Option<String>, new_status: &str) -> (r: Result<StatusChange, DbError>)
    ensures
        r is Err <==> current is None,
        r matches Err(e) ==> e is NotFound && e->NotFound_0@ == missing_entry(id),
        r matches Ok(c) ==> Some(c.from) == *current && c.to@ == new_status@,
{
    match current {
        None => Err(missing_entry_exec(id)),
        Some(from) => Ok(StatusChange { from: from.clone(), to: owned(new_status) }),
    }
}

/// A move to record: where the copy was and where it goes.
#[derive(Debug, Clone, Copy, PartialEq, Eq, Structural)]
pub struct Movement {
    pub from_binder: Option<i64>,
    pub to_binder: Option<i64>,
    pub from_deck: Option<i64>,
    pub to_deck: Option<i64>,
}

/// Move copy `id` to a binder, a deck, or neither. Both at once is a
/// conflict (checked first); `current` — the copy's `(binder, deck)`,
/// `None` when there is no such copy — not found.
pub fn move_to(id: i64, current: Option<(Option<i64>, Option<i64>)>, binder_id: Option<i64>, deck_id: Option<i64>) -> (r: Result<Movement, DbError>)
    ensures
        binder_id is Some && deck_id is Some ==> (r matches Err(e) && e is Conflict),
        !(binder_id is Some && deck_id is Some) && current is None ==> (r matches Err(e) && e is NotFound
            && e->NotFound_0@ == missing_entry(id)),
        r is Ok <==> !(binder_id is Some && deck_id is Some) && current is Some,
        r matches Ok(m) ==> m == (Movement {
            from_binder: current.unwrap().0,
            to_binder: binder_id,
            from_deck: current.unwrap().1,
            to_deck: deck_id,
        }),
{
    if binder_id.is_some() && deck_id.is_some() {
        return Err(DbError::Conflict(owned("a copy cannot be in a binder and a deck at once")));
    }
    match current {
        None => Err(missing_entry_exec(id)),
        Some((from_binder, from_deck)) => Ok(Movement { from_binder, to_binder: binder_id, from_deck, to_deck: deck_id }),
    }
}

/// Change which printing copy `id` is, to `new_printing_id`.
/// `current_card` is the card of the copy's current printing (`None` when
/// there is no such copy, or its printing is unknown to the catalog) and
/// `new_card` the card of the new printing (`None` when the catalog lacks
/// it). No copy is not found; an unknown new printing is not found;
/// another card's printing is a conflict — a copy moves between the
/// variants of one card only.
pub fn change_printing(
    id: i64,
    copy_exists: bool,
    current_card: &Option<String>,
    new_printing_id: &str,
    new_card: &Option<String>,
) -> (r: Result<(), DbError>)
    ensures
        !copy_exists ==> (r matches Err(e) && e is NotFound && e->NotFound_0@ == missing_entry(id)),
        copy_exists && new_card is None ==> (r matches Err(e) && e is NotFound && e->NotFound_0@ == "printing '"@
            + new_printing_id@ + "' is not in the catalog"@),
        copy_exists && new_card is Some && !(current_card is Some && current_card.unwrap()@ == new_card.unwrap()@)
            ==> (r matches Err(e) && e is Conflict),
        r is Ok <==> copy_exists && new_card is Some && current_card is Some && current_card.unwrap()@
            == new_card.unwrap()@,
{
    if !copy_exists {
        return Err(missing_entry_exec(id));
    }
    let nc = match new_card {
        None => {
            return Err(DbError::NotFound(cat3("printing '", new_printing_id, "' is not in the catalog")));
        },
        Some(c) => c,
    };
    match current_card {
        Some(cc) => {
            if str_eq(cc.as_str(), nc.as_str()) {
                Ok(())
            } else {
                Err(DbError::Conflict(owned("a copy can only be changed to another printing of the same card")))
            }
        },
        None => Err(DbError::Conflict(owned("a copy can only be changed to another printing of the same card"))),
    }
}

/// The most recently added copy of a printing — the highest id among the
/// copies `(id, printing_id)` of that printing.
pub fn latest_for_printing(copies: &Vec<(i64, String)>, printing_id: &str) -> (r: Option<i64>)
    ensures
        r is None <==> forall|i: int| 0 <= i < copies@.len() ==> (#[trigger] copies@[i]).1@ != printing_id@,
        r matches Some(id) ==> (exists|i: int| 0 <= i < copies@.len() && (#[trigger] copies@[i]).1@ == printing_id@
            && copies@[i].0 == id) && forall|i: int| 0 <= i < copies@.len() && (#[trigger] copies@[i]).1@
            == printing_id@ ==> copies@[i].0 <= id,
{
    let mut best: Option<i64> = None;
    let mut i: usize = 0;
    while i < copies.len()
        invariant
            i <= copies@.len(),
            best is None <==> forall|k: int| 0 <= k < i ==> (#[trigger] copies@[k]).1@ != printing_id@,
            best matches Some(b) ==> (exists|k: int| 0 <= k < i && (#[trigger] copies@[k]).1@ == printing_id@
                && copies@[k].0 == b) && forall|k: int| 0 <= k < i && (#[trigger] copies@[k]).1@
                == printing_id@ ==> copies@[k].0 <= b,
        decreases copies.len() - i,
    {
        if str_eq(copies[i].1.as_str(), printing_id) {
            let id = copies[i].0;
            match best {
                None => {
                    best = Some(id);
                },
                Some(b) => {
                    if id > b {
                        best = Some(id);
                    }
                },
            }
        }
        i = i + 1;
    }
    best
}


/// An edit replaces exactly the fields it names: each editable field given
/// a value takes it, each left out keeps the stored one, and the copy's id,
/// printing, acquisition, source, status and placement never change.
pub proof fn lemma_edit_replaces_only_named_fields(e: CollectionEntry, edit: CopyEdit, r: CollectionEntry)
    requires
        r == edited_copy(e, edit),
    ensures
        edit.condition matches Some(v) ==> r.condition == v,
        edit.condition is None ==> r.condition == e.condition,
        edit.language matches Some(v) ==> r.language == v,
        edit.language is None ==> r.language == e.language,
        edit.purchase_price_bits matches Some(v) ==> r.purchase_price_bits == Some(v),
        edit.purchase_price_bits is None ==> r.purchase_price_bits == e.purchase_price_bits,
        edit.sale_price_bits matches Some(v) ==> r.sale_price_bits == Some(v),
        edit.sale_price_bits is None ==> r.sale_price_bits == e.sale_price_bits,
        edit.notes matches Some(v) ==> r.notes == Some(v),
        edit.notes is None ==> r.notes == e.notes,
        edit.tags matches Some(v) ==> r.tags == Some(v),
        edit.tags is None ==> r.tags == e.tags,
        edit.graded matches Some(v) ==> r.graded == v,
        edit.graded is None ==> r.graded == e.graded,
        edit.grade_company matches Some(v) ==> r.grade_company == Some(v),
        edit.grade_company is None ==> r.grade_company == e.grade_company,
        edit.grade_value_bits matches Some(v) ==> r.grade_value_bits == Some(v),
        edit.grade_value_bits is None ==> r.grade_value_bits == e.grade_value_bits,
        edit.grade_cert matches Some(v) ==> r.grade_cert == Some(v),
        edit.grade_cert is None ==> r.grade_cert == e.grade_cert,
        r.id == e.id,
        r.printing_id == e.printing_id,
        r.acquired_at == e.acquired_at,
        r.source == e.source,
        r.status == e.status,
        r.order_id == e.order_id,
        r.binder_id == e.binder_id,
        r.deck_id == e.deck_id,
        r.batch_id == e.batch_id,
{
}

} // verus!
