//! Binders, decks and ingest batches — where copies live and how they came
//! in. What is decided about them: the defaults a new one gets, and how an
//! edit applies — a field left out is kept, never cleared — with every
//! change stamped from the clock.

use vstd::prelude::*;
use crate::error::DbError;

verus! {

/// A binder, with the count of cards assigned to it.
#[derive(Debug, Clone, PartialEq, Eq)]
pub struct Binder {
    pub id: i64,
    pub name: String,
    pub description: Option<String>,
    pub color: Option<String>,
    pub binder_type: Option<String>,
    pub pocket_size: i64,
    pub storage_location: Option<String>,
    pub created_at: String,
    pub updated_at: String,
    pub card_count: i64,
}

/// Fields for creating a binder.
#[derive(Debug, Clone, PartialEq, Eq)]
pub struct NewBinder {
    pub name: String,
    pub description: Option<String>,
    pub color: Option<String>,
    pub binder_type: Option<String>,
    pub pocket_size: Option<i64>,
    pub storage_location: Option<String>,
}

/// Editable binder fields. A `None` field is left unchanged.
#[derive(Debug, Clone, PartialEq, Eq)]
pub struct BinderEdit {
    pub name: Option<String>,
    pub description: Option<String>,
    pub color: Option<String>,
    pub binder_type: Option<String>,
    pub pocket_size: Option<i64>,
    pub storage_location: Option<String>,
}

/// A deck, with the count of cards assigned to it.
#[derive(Debug, Clone, PartialEq, Eq)]
pub struct Deck {
    pub id: i64,
    pub name: String,
    pub description: Option<String>,
    pub format: Option<String>,
    pub owner: Option<String>,
    /// `idea` | `ready` | `built`.
    pub state: String,
    pub sleeve_color: Option<String>,
    pub storage_location: Option<String>,
    pub notes: Option<String>,
    pub created_at: String,
    pub updated_at: String,
    pub card_count: i64,
}

/// Fields for creating a deck.
#[derive(Debug, Clone, PartialEq, Eq)]
pub struct NewDeck {
    pub name: String,
    pub description: Option<String>,
    pub format: Option<String>,
    pub owner: Option<String>,
    pub state: Option<String>,
    pub sleeve_color: Option<String>,
    pub storage_location: Option<String>,
    pub notes: Option<String>,
}

/// Editable deck fields. A `None` field is left unchanged.
#[derive(Debug, Clone, PartialEq, Eq)]
pub struct DeckEdit {
    pub name: Option<String>,
    pub description: Option<String>,
    pub format: Option<String>,
    pub owner: Option<String>,
    pub state: Option<String>,
    pub sleeve_color: Option<String>,
    pub storage_location: Option<String>,
    pub notes: Option<String>,
}

/// An ingest batch, with the count of cards it brought in.
#[derive(Debug, Clone, PartialEq, Eq)]
pub struct Batch {
    pub id: i64,
    pub batch_type: String,
    pub name: Option<String>,
    pub notes: Option<String>,
    pub order_id: Option<i64>,
    pub binder_id: Option<i64>,
    pub created_at: String,
    pub card_count: i64,
}

/// Fields for creating a batch.
#[derive(Debug, Clone, PartialEq, Eq)]
pub struct NewBatch {
    pub batch_type: String,
    pub name: Option<String>,
    pub notes: Option<String>,
    pub order_id: Option<i64>,
    pub binder_id: Option<i64>,
}

/// `new` when given, `old` otherwise — SQL's `COALESCE(new, old)`.
pub open spec fn keep<T>(new: Option<T>, old: T) -> T {
    match new {
        Some(v) => v,
        None => old,
    }
}

pub(crate) fn keep_str(new: &Option<String>, old: &String) -> (r: String)
    ensures
        r == keep(*new, *old),
{
    match new {
        Some(v) => v.clone(),
        None => old.clone(),
    }
}

pub(crate) fn keep_opt(new: &Option<String>, old: &Option<String>) -> (r: Option<String>)
    ensures
        r == match *new { Some(v) => Some(v), None => *old },
{
    match new {
        Some(v) => Some(v.clone()),
        None => match old {
            Some(o) => Some(o.clone()),
            None => None,
        },
    }
}

/// The binder a create inserts, stamped `now` (created and updated): nine
/// pockets a page unless said otherwise, and no cards yet.
pub fn new_binder(id: i64, new: &NewBinder, now: &String) -> (b: Binder)
    ensures
        b.id == id,
        b.name == new.name,
        b.description == new.description,
        b.color == new.color,
        b.binder_type == new.binder_type,
        b.pocket_size == keep(new.pocket_size, 9),
        b.storage_location == new.storage_location,
        b.created_at == *now,
        b.updated_at == *now,
        b.card_count == 0,
{
    Binder {
        id,
        name: new.name.clone(),
        description: keep_opt(&None, &new.description),
        color: keep_opt(&None, &new.color),
        binder_type: keep_opt(&None, &new.binder_type),
        pocket_size: match new.pocket_size {
            Some(p) => p,
            None => 9,
        },
        storage_location: keep_opt(&None, &new.storage_location),
        created_at: now.clone(),
        updated_at: now.clone(),
        card_count: 0,
    }
}

/// Apply an edit to a binder at `now`: each given field replaces the
/// stored one, every other is kept, and the binder is stamped updated.
pub fn edit_binder(b: &Binder, edit: &BinderEdit, now: &String) -> (r: Binder)
    ensures
        r.id == b.id,
        r.name == keep(edit.name, b.name),
        r.description == (match edit.description { Some(v) => Some(v), None => b.description }),
        r.color == (match edit.color { Some(v) => Some(v), None => b.color }),
        r.binder_type == (match edit.binder_type { Some(v) => Some(v), None => b.binder_type }),
        r.pocket_size == keep(edit.pocket_size, b.pocket_size),
        r.storage_location == (match edit.storage_location { Some(v) => Some(v), None => b.storage_location }),
        r.created_at == b.created_at,
        r.updated_at == *now,
        r.card_count == b.card_count,
        r == edited_binder(*b, *edit, *now),
{
    Binder {
        id: b.id,
        name: keep_str(&edit.name, &b.name),
        description: keep_opt(&edit.description, &b.description),
        color: keep_opt(&edit.color, &b.color),
        binder_type: keep_opt(&edit.binder_type, &b.binder_type),
        pocket_size: match edit.pocket_size {
            Some(p) => p,
            None => b.pocket_size,
        },
        storage_location: keep_opt(&edit.storage_location, &b.storage_location),
        created_at: b.created_at.clone(),
        updated_at: now.clone(),
        card_count: b.card_count,
    }
}

/// A deck's lifecycle state: `idea`, `ready` or `built`.
pub open spec fn valid_deck_state(s: Seq<char>) -> bool {
    s == "idea"@ || s == "ready"@ || s == "built"@
}

fn deck_state_ok(s: &String) -> (r: bool)
    ensures
        r == valid_deck_state(s@),
{
    crate::text::str_eq(s.as_str(), "idea") || crate::text::str_eq(s.as_str(), "ready") || crate::text::str_eq(
        s.as_str(),
        "built",
    )
}

/// The deck a create inserts, stamped `now`: an `idea` unless said
/// otherwise, and no cards yet. A state other than the three a deck can be
/// in is refused by the table's check, and nothing is written.
pub fn new_deck(id: i64, new: &NewDeck, now: &String) -> (r: Result<Deck, DbError>)
    ensures
        r is Err <==> !valid_deck_state(match new.state { Some(s) => s@, None => "idea"@ }),
        r matches Err(e) ==> e is Sqlite,
        r matches Ok(d) ==> {
            &&& d.id == id
            &&& d.name == new.name
            &&& d.description == new.description
            &&& d.format == new.format
            &&& d.owner == new.owner
            &&& d.state@ == match new.state { Some(s) => s@, None => "idea"@ }
            &&& d.sleeve_color == new.sleeve_color
            &&& d.storage_location == new.storage_location
            &&& d.notes == new.notes
            &&& d.created_at == *now
            &&& d.updated_at == *now
            &&& d.card_count == 0
        },
{
    let state = match &new.state {
        Some(s) => s.clone(),
        None => crate::text::owned("idea"),
    };
    if !deck_state_ok(&state) {
        return Err(DbError::Sqlite(crate::text::owned("CHECK constraint failed: deck state")));
    }
    Ok(Deck {
        id,
        name: new.name.clone(),
        description: keep_opt(&None, &new.description),
        format: keep_opt(&None, &new.format),
        owner: keep_opt(&None, &new.owner),
        state,
        sleeve_color: keep_opt(&None, &new.sleeve_color),
        storage_location: keep_opt(&None, &new.storage_location),
        notes: keep_opt(&None, &new.notes),
        created_at: now.clone(),
        updated_at: now.clone(),
        card_count: 0,
    })
}

/// Apply an edit to a deck at `now`, as for binders; an edit that would
/// leave the deck in a state it cannot be in is refused by the table's
/// check, and the deck is left as it was.
pub fn edit_deck(d: &Deck, edit: &DeckEdit, now: &String) -> (r: Result<Deck, DbError>)
    ensures
        r is Err <==> !valid_deck_state(keep(edit.state, d.state)@),
        r matches Err(e) ==> e is Sqlite,
        r matches Ok(r) ==> {
            &&& r.id == d.id
            &&& r.name == keep(edit.name, d.name)
            &&& r.description == (match edit.description { Some(v) => Some(v), None => d.description })
            &&& r.format == (match edit.format { Some(v) => Some(v), None => d.format })
            &&& r.owner == (match edit.owner { Some(v) => Some(v), None => d.owner })
            &&& r.state == keep(edit.state, d.state)
            &&& r.sleeve_color == (match edit.sleeve_color { Some(v) => Some(v), None => d.sleeve_color })
            &&& r.storage_location == (match edit.storage_location { Some(v) => Some(v), None => d.storage_location })
            &&& r.notes == (match edit.notes { Some(v) => Some(v), None => d.notes })
            &&& r.created_at == d.created_at
            &&& r.updated_at == *now
            &&& r.card_count == d.card_count
        },
{
    let state = keep_str(&edit.state, &d.state);
    if !deck_state_ok(&state) {
        return Err(DbError::Sqlite(crate::text::owned("CHECK constraint failed: deck state")));
    }
    Ok(Deck {
        id: d.id,
        name: keep_str(&edit.name, &d.name),
        description: keep_opt(&edit.description, &d.description),
        format: keep_opt(&edit.format, &d.format),
        owner: keep_opt(&edit.owner, &d.owner),
        state,
        sleeve_color: keep_opt(&edit.sleeve_color, &d.sleeve_color),
        storage_location: keep_opt(&edit.storage_location, &d.storage_location),
        notes: keep_opt(&edit.notes, &d.notes),
        created_at: d.created_at.clone(),
        updated_at: now.clone(),
        card_count: d.card_count,
    })
}

/// The batch a create inserts, stamped `now`, with no cards yet.
pub fn new_batch(id: i64, new: &NewBatch, now: &String) -> (b: Batch)
    ensures
        b.id == id,
        b.batch_type == new.batch_type,
        b.name == new.name,
        b.notes == new.notes,
        b.order_id == new.order_id,
        b.binder_id == new.binder_id,
        b.created_at == *now,
        b.card_count == 0,
{
    Batch {
        id,
        batch_type: new.batch_type.clone(),
        name: keep_opt(&None, &new.name),
        notes: keep_opt(&None, &new.notes),
        order_id: new.order_id,
        binder_id: new.binder_id,
        created_at: now.clone(),
        card_count: 0,
    }
}

/// A binder with an edit applied at `now`.
pub open spec fn edited_binder(b: Binder, e: BinderEdit, now: String) -> Binder {
    Binder {
        name: keep(e.name, b.name),
        description: match e.description { Some(v) => Some(v), None => b.description },
        color: match e.color { Some(v) => Some(v), None => b.color },
        binder_type: match e.binder_type { Some(v) => Some(v), None => b.binder_type },
        pocket_size: keep(e.pocket_size, b.pocket_size),
        storage_location: match e.storage_location { Some(v) => Some(v), None => b.storage_location },
        updated_at: now,
        ..b
    }
}

/// An empty edit changes nothing but the stamp, and applying the same edit
/// twice is applying it once.
pub proof fn lemma_binder_edit_is_idempotent(b: Binder, e: BinderEdit, now: String)
    ensures
        edited_binder(edited_binder(b, e, now), e, now) == edited_binder(b, e, now),
        (e.name is None && e.description is None && e.color is None && e.binder_type is None
            && e.pocket_size is None && e.storage_location is None) ==> edited_binder(b, e, now)
            == (Binder { updated_at: now, ..b }),
{
}

} // verus!
