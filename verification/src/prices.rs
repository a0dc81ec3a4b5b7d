//! The one definition of what a printing is worth right now.
//!
//! 1. The feed's market price for the printing, when the feed prices it.
//! 2. Otherwise the catalog's curated override for it, when there is one.
//! 3. Otherwise — and only for a printing the tenant invented, never for a
//!    catalog printing — the tenant's newest manual price.
//!
//! A catalog printing is the same for every tenant, so a gap in its price
//! is a catalog defect and belongs in arm 2; arm 3 is for what the catalog
//! cannot know about. Prices are carried as the bit patterns of their
//! `f64`s; observation times are ISO-8601 text, newest by text order.

use vstd::prelude::*;
use crate::order::{lex_compare, lex_lt, lemma_lex_transitive, lemma_lex_irreflexive};
use crate::text::chars_of;

verus! {

/// One manual price observation of a printing.
#[derive(Debug, Clone, PartialEq, Eq)]
pub struct ManualObservation {
    pub observed_at: String,
    pub price_bits: u64,
}

/// Observation `i` is among the newest of `obs`: none is later.
pub open spec fn is_newest(obs: Seq<ManualObservation>, i: int) -> bool {
    &&& 0 <= i < obs.len()
    &&& forall|j: int| 0 <= j < obs.len() ==> !lex_lt(obs[i].observed_at@, #[trigger] obs[j].observed_at@)
}

/// The effective price `r` of a printing, given the feed's market price,
/// the catalog override, whether the tenant invented the printing, and the
/// tenant's manual observations of it.
pub open spec fn effective_price(
    feed: Option<u64>,
    catalog_override: Option<u64>,
    user_printing: bool,
    manual: Seq<ManualObservation>,
    r: Option<u64>,
) -> bool {
    if feed is Some {
        r == feed
    } else if catalog_override is Some {
        r == catalog_override
    } else if !user_printing || manual.len() == 0 {
        r is None
    } else {
        exists|i: int| #[trigger] is_newest(manual, i) && r == Some(manual[i].price_bits)
    }
}

/// The newest of a non-empty list of observations: the first of the
/// latest.
fn newest_index(manual: &Vec<ManualObservation>) -> (k: usize)
    requires
        manual@.len() > 0,
    ensures
        is_newest(manual@, k as int),
{
    let mut best: usize = 0;
    let mut best_key = chars_of(manual[0].observed_at.as_str());
    let mut i: usize = 1;
    proof {
        lemma_lex_irreflexive(manual@[0].observed_at@);
    }
    while i < manual.len()
        invariant
            1 <= i <= manual@.len(),
            best < i,
            best_key@ == manual@[best as int].observed_at@,
            forall|j: int| 0 <= j < i ==> !lex_lt(manual@[best as int].observed_at@, #[trigger] manual@[j].observed_at@),
        decreases manual.len() - i,
    {
        let key = chars_of(manual[i].observed_at.as_str());
        let c = lex_compare(&best_key, &key);
        if c < 0 {
            proof {
                let b = manual@[best as int].observed_at@;
                let n = manual@[i as int].observed_at@;
                assert forall|j: int| 0 <= j < i + 1 implies !lex_lt(n, #[trigger] manual@[j].observed_at@) by {
                    let m = manual@[j].observed_at@;
                    if j < i {
                        if lex_lt(n, m) {
                            lemma_lex_transitive(b, n, m);
                        }
                    } else {
                        lemma_lex_irreflexive(n);
                    }
                }
            }
            best = i;
            best_key = key;
        }
        i = i + 1;
    }
    best
}

/// What the printing is worth: the feed's market price wins; an override
/// fills a gap the feed leaves; a tenant's own newest manual price counts
/// only for a printing the tenant invented. No price at all is `None`.
pub fn market_price(
    feed: Option<u64>,
    catalog_override: Option<u64>,
    user_printing: bool,
    manual: &Vec<ManualObservation>,
) -> (r: Option<u64>)
    ensures
        effective_price(feed, catalog_override, user_printing, manual@, r),
        feed is Some ==> r == feed,
        !user_printing ==> (r is Some <==> feed is Some || catalog_override is Some),
{
    if feed.is_some() {
        return feed;
    }
    if catalog_override.is_some() {
        return catalog_override;
    }
    if !user_printing || manual.len() == 0 {
        return None;
    }
    let k = newest_index(manual);
    Some(manual[k].price_bits)
}

} // verus!
