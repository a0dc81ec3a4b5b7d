//! Decisions behind user-entered manual prices. A price is recorded only
//! for a printing that the catalog or the tenant's own printings hold, and
//! is observed now unless a time is given. The market price from the feed
//! always wins where there is one; a manual price is only consulted where
//! there is none. The price is carried as the bit pattern of its `f64`.

use vstd::prelude::*;
use crate::clock::{Clock, now_rfc3339, readable, advanced, spec_rfc3339_of};
use crate::error::DbError;
use crate::shelves::keep_opt;
use crate::text::cat;

verus! {

/// Input fields for recording a manual price.
#[derive(Debug, Clone, PartialEq, Eq)]
pub struct NewManualPrice {
    pub printing_id: String,
    pub price_bits: u64,
    /// An ISO-8601 timestamp; `None` means now.
    pub observed_at: Option<String>,
    pub note: Option<String>,
}

/// The row an insert writes.
#[derive(Debug, Clone, PartialEq, Eq)]
pub struct PlannedManualPrice {
    pub printing_id: String,
    pub price_bits: u64,
    pub observed_at: String,
    pub note: Option<String>,
}

/// Record a manual price: a printing found neither in the catalog nor among
/// the tenant's own printings (`printing_exists` false) is not found, and
/// the clock is left alone. Otherwise the row carries what was given, and
/// is observed now — the clock is read — when no time was given.
pub fn insert(new: &NewManualPrice, printing_exists: bool, clock: &mut Clock) -> (r: Result<
    PlannedManualPrice,
    DbError,
>)
    requires
        readable(*old(clock)),
    ensures
        r is Err <==> !printing_exists,
        r matches Err(e) ==> e is NotFound && e->NotFound_0@ == "printing "@ + new.printing_id@,
        r is Err ==> *final(clock) == *old(clock),
        r matches Ok(p) ==> {
            &&& p.printing_id == new.printing_id
            &&& p.price_bits == new.price_bits
            &&& p.note == new.note
            &&& new.observed_at matches Some(t) ==> p.observed_at == t && *final(clock) == *old(clock)
            &&& new.observed_at is None ==> *final(clock) == advanced(*old(clock))
            &&& (new.observed_at is None && old(clock).pinned is Some) ==> p.observed_at@
                == spec_rfc3339_of(old(clock).pinned.unwrap().next)
        },
{
    if !printing_exists {
        return Err(DbError::NotFound(cat("printing ", new.printing_id.as_str())));
    }
    let observed_at = match &new.observed_at {
        Some(t) => t.clone(),
        None => now_rfc3339(clock),
    };
    Ok(PlannedManualPrice {
        printing_id: new.printing_id.clone(),
        price_bits: new.price_bits,
        observed_at,
        note: keep_opt(&None, &new.note),
    })
}

} // verus!
